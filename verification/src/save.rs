//! The persisted record and its line-based `key=value` codec.
//!
//! The format is one field per line, `name=value`, ended by a newline.
//! Loading is forgiving: unknown keys are skipped, a malformed or
//! out-of-range value falls back to 0 for its field alone, keys and values
//! are trimmed of blanks, and an empty input yields the all-zero record.

use vstd::prelude::*;
use vstd::slice::{slice_index_get, slice_subrange};

verus! {

/// The persisted state: currency, the five upgrade levels, best score.
#[derive(Clone, Copy, PartialEq, Eq, Structural, Debug)]
pub struct SaveRecord {
    pub currency: i32,
    pub speed: u32,
    pub dash_cd: u32,
    pub dash_time: u32,
    pub shard_value: u32,
    pub magnet: u32,
    pub best: i32,
}

impl SaveRecord {
    /// The record every field defaults to.
    pub fn zero() -> (r: SaveRecord)
        ensures
            r == zero_record(),
    {
        SaveRecord {
            currency: 0,
            speed: 0,
            dash_cd: 0,
            dash_time: 0,
            shard_value: 0,
            magnet: 0,
            best: 0,
        }
    }
}

pub open spec fn zero_record() -> SaveRecord {
    SaveRecord { currency: 0, speed: 0, dash_cd: 0, dash_time: 0, shard_value: 0, magnet: 0, best: 0 }
}

// The seven field keys, as ASCII bytes.
pub open spec fn key_currency() -> Seq<u8> {
    seq![99u8, 117u8, 114u8, 114u8, 101u8, 110u8, 99u8, 121u8]
}

pub open spec fn key_speed() -> Seq<u8> {
    seq![115u8, 112u8, 101u8, 101u8, 100u8]
}

pub open spec fn key_dash_cd() -> Seq<u8> {
    seq![100u8, 97u8, 115u8, 104u8, 95u8, 99u8, 100u8]
}

pub open spec fn key_dash_time() -> Seq<u8> {
    seq![100u8, 97u8, 115u8, 104u8, 95u8, 116u8, 105u8, 109u8, 101u8]
}

pub open spec fn key_shard_value() -> Seq<u8> {
    seq![115u8, 104u8, 97u8, 114u8, 100u8, 95u8, 118u8, 97u8, 108u8, 117u8, 101u8]
}

pub open spec fn key_magnet() -> Seq<u8> {
    seq![109u8, 97u8, 103u8, 110u8, 101u8, 116u8]
}

pub open spec fn key_best() -> Seq<u8> {
    seq![98u8, 101u8, 115u8, 116u8]
}

/// The seven fields, in file order.
#[derive(Clone, Copy, PartialEq, Eq, Structural, Debug)]
pub enum FieldTag {
    Currency,
    Speed,
    DashCd,
    DashTime,
    ShardValue,
    Magnet,
    Best,
}

pub open spec fn key_seq(t: FieldTag) -> Seq<u8> {
    match t {
        FieldTag::Currency => key_currency(),
        FieldTag::Speed => key_speed(),
        FieldTag::DashCd => key_dash_cd(),
        FieldTag::DashTime => key_dash_time(),
        FieldTag::ShardValue => key_shard_value(),
        FieldTag::Magnet => key_magnet(),
        FieldTag::Best => key_best(),
    }
}

/// The key's bytes, for writing and for comparing.
pub fn key_bytes(t: FieldTag) -> (v: Vec<u8>)
    ensures
        v@ == key_seq(t),
{
    let mut v: Vec<u8> = Vec::new();
    match t {
        FieldTag::Currency => {
            v.push(99);
            v.push(117);
            v.push(114);
            v.push(114);
            v.push(101);
            v.push(110);
            v.push(99);
            v.push(121);
        },
        FieldTag::Speed => {
            v.push(115);
            v.push(112);
            v.push(101);
            v.push(101);
            v.push(100);
        },
        FieldTag::DashCd => {
            v.push(100);
            v.push(97);
            v.push(115);
            v.push(104);
            v.push(95);
            v.push(99);
            v.push(100);
        },
        FieldTag::DashTime => {
            v.push(100);
            v.push(97);
            v.push(115);
            v.push(104);
            v.push(95);
            v.push(116);
            v.push(105);
            v.push(109);
            v.push(101);
        },
        FieldTag::ShardValue => {
            v.push(115);
            v.push(104);
            v.push(97);
            v.push(114);
            v.push(100);
            v.push(95);
            v.push(118);
            v.push(97);
            v.push(108);
            v.push(117);
            v.push(101);
        },
        FieldTag::Magnet => {
            v.push(109);
            v.push(97);
            v.push(103);
            v.push(110);
            v.push(101);
            v.push(116);
        },
        FieldTag::Best => {
            v.push(98);
            v.push(101);
            v.push(115);
            v.push(116);
        },
    }
    proof {
        assert(v@ =~= key_seq(t));
    }
    v
}

pub open spec fn is_digit(b: u8) -> bool {
    48 <= b <= 57
}

pub open spec fn all_digits(s: Seq<u8>) -> bool {
    forall|i: int| 0 <= i < s.len() ==> is_digit(#[trigger] s[i])
}

/// The number a digit string denotes.
pub open spec fn dec_val(s: Seq<u8>) -> nat
    decreases s.len(),
{
    if s.len() == 0 {
        0
    } else {
        dec_val(s.drop_last()) * 10 + (s.last() - 48) as nat
    }
}

/// The canonical digits of `n`: no sign, no leading zero (except "0").
pub open spec fn dec_rep(n: nat) -> Seq<u8>
    decreases n,
{
    if n < 10 {
        seq![(48 + n) as u8]
    } else {
        dec_rep(n / 10).push((48 + n % 10) as u8)
    }
}

pub open spec fn enc_u32(v: u32) -> Seq<u8> {
    dec_rep(v as nat)
}

pub open spec fn enc_i32(v: i32) -> Seq<u8> {
    if v < 0 {
        seq![45u8] + dec_rep((-v) as nat)
    } else {
        dec_rep(v as nat)
    }
}

pub open spec fn is_blank(b: u8) -> bool {
    b == 32 || b == 9 || b == 13
}

pub open spec fn trim_front(s: Seq<u8>) -> Seq<u8>
    decreases s.len(),
{
    if s.len() > 0 && is_blank(s[0]) {
        trim_front(s.drop_first())
    } else {
        s
    }
}

pub open spec fn trim_back(s: Seq<u8>) -> Seq<u8>
    decreases s.len(),
{
    if s.len() > 0 && is_blank(s.last()) {
        trim_back(s.drop_last())
    } else {
        s
    }
}

/// Both ends stripped of spaces, tabs and carriage returns.
pub open spec fn trim_spec(s: Seq<u8>) -> Seq<u8> {
    trim_back(trim_front(s))
}

/// Index of the first `b` in `s`, or `s.len()` when absent.
pub open spec fn find_byte(s: Seq<u8>, b: u8) -> int
    decreases s.len(),
{
    if s.len() == 0 {
        0
    } else if s[0] == b {
        0
    } else {
        1 + find_byte(s.drop_first(), b)
    }
}

pub proof fn lemma_find_byte_first(s: Seq<u8>, b: u8, i: int)
    requires
        0 <= i <= s.len(),
        i < s.len() ==> s[i] == b,
        forall|m: int| 0 <= m < i ==> s[m] != b,
        i == s.len() ==> forall|m: int| 0 <= m < s.len() ==> s[m] != b,
    ensures
        find_byte(s, b) == i,
    decreases s.len(),
{
    if s.len() == 0 {
    } else if s[0] == b {
        assert(i == 0);
    } else {
        assert(i >= 1);
        let t = s.drop_first();
        assert(forall|m: int| 0 <= m < t.len() ==> t[m] == s[m + 1]);
        lemma_find_byte_first(t, b, i - 1);
    }
}

/// The value a `u32` field takes from trimmed bytes: digits with an
/// optional leading plus, else 0; an overflowing value also gives 0.
pub open spec fn parse_u32_spec(s: Seq<u8>) -> u32 {
    let t = if s.len() > 0 && s[0] == 43 {
        s.drop_first()
    } else {
        s
    };
    if t.len() > 0 && all_digits(t) && dec_val(t) <= u32::MAX {
        dec_val(t) as u32
    } else {
        0
    }
}

/// The value an `i32` field takes from trimmed bytes: an optional sign
/// and digits, else 0; out-of-range values also give 0.
pub open spec fn parse_i32_spec(s: Seq<u8>) -> i32 {
    if s.len() > 0 && s[0] == 45 {
        let t = s.drop_first();
        if t.len() > 0 && all_digits(t) && dec_val(t) <= 2_147_483_648 {
            (0 - dec_val(t)) as i32
        } else {
            0
        }
    } else {
        let t = if s.len() > 0 && s[0] == 43 {
            s.drop_first()
        } else {
            s
        };
        if t.len() > 0 && all_digits(t) && dec_val(t) <= i32::MAX {
            dec_val(t) as i32
        } else {
            0
        }
    }
}

/// One line lands in the field its key names; anything else is skipped.
pub open spec fn apply_line(r: SaveRecord, line: Seq<u8>) -> SaveRecord {
    let eq = find_byte(line, 61);
    if eq == line.len() {
        r
    } else {
        let k = trim_spec(line.subrange(0, eq));
        let v = trim_spec(line.subrange(eq + 1, line.len() as int));
        if k == key_currency() {
            SaveRecord { currency: parse_i32_spec(v), ..r }
        } else if k == key_speed() {
            SaveRecord { speed: parse_u32_spec(v), ..r }
        } else if k == key_dash_cd() {
            SaveRecord { dash_cd: parse_u32_spec(v), ..r }
        } else if k == key_dash_time() {
            SaveRecord { dash_time: parse_u32_spec(v), ..r }
        } else if k == key_shard_value() {
            SaveRecord { shard_value: parse_u32_spec(v), ..r }
        } else if k == key_magnet() {
            SaveRecord { magnet: parse_u32_spec(v), ..r }
        } else if k == key_best() {
            SaveRecord { best: parse_i32_spec(v), ..r }
        } else {
            r
        }
    }
}

/// Folds the input line by line; later lines overwrite earlier ones.
pub open spec fn parse_lines(r: SaveRecord, s: Seq<u8>) -> SaveRecord
    decreases s.len(),
{
    if s.len() == 0 {
        r
    } else {
        let nl = find_byte(s, 10);
        if 0 <= nl < s.len() {
            parse_lines(apply_line(r, s.subrange(0, nl)), s.subrange(nl + 1, s.len() as int))
        } else {
            apply_line(r, s)
        }
    }
}

/// What loading the given bytes yields.
pub open spec fn parse_save_spec(s: Seq<u8>) -> SaveRecord {
    parse_lines(zero_record(), s)
}

/// The canonical file for a record: the seven fields in a fixed order.
pub open spec fn encode_save_spec(r: SaveRecord) -> Seq<u8> {
    key_currency() + seq![61u8] + enc_i32(r.currency) + seq![10u8] + key_speed() + seq![61u8]
        + enc_u32(r.speed) + seq![10u8] + key_dash_cd() + seq![61u8] + enc_u32(r.dash_cd) + seq![
        10u8,
    ] + key_dash_time() + seq![61u8] + enc_u32(r.dash_time) + seq![10u8] + key_shard_value()
        + seq![61u8] + enc_u32(r.shard_value) + seq![10u8] + key_magnet() + seq![61u8] + enc_u32(
        r.magnet,
    ) + seq![10u8] + key_best() + seq![61u8] + enc_i32(r.best) + seq![10u8]
}

/// Bytes that may stand in a field key: lowercase letters and underscore.
pub open spec fn plain_key_byte(b: u8) -> bool {
    (97 <= b <= 122) || b == 95
}

proof fn lemma_keys_plain()
    ensures
        forall|i: int|
            0 <= i < key_currency().len() ==> plain_key_byte(#[trigger] key_currency()[i]),
        forall|i: int| 0 <= i < key_speed().len() ==> plain_key_byte(#[trigger] key_speed()[i]),
        forall|i: int|
            0 <= i < key_dash_cd().len() ==> plain_key_byte(#[trigger] key_dash_cd()[i]),
        forall|i: int|
            0 <= i < key_dash_time().len() ==> plain_key_byte(#[trigger] key_dash_time()[i]),
        forall|i: int|
            0 <= i < key_shard_value().len() ==> plain_key_byte(#[trigger] key_shard_value()[i]),
        forall|i: int| 0 <= i < key_magnet().len() ==> plain_key_byte(#[trigger] key_magnet()[i]),
        forall|i: int| 0 <= i < key_best().len() ==> plain_key_byte(#[trigger] key_best()[i]),
{
}

proof fn lemma_dec_rep_digits(n: nat)
    ensures
        dec_rep(n).len() >= 1,
        forall|i: int| 0 <= i < dec_rep(n).len() ==> 48 <= #[trigger] dec_rep(n)[i] <= 57,
    decreases n,
{
    if n >= 10 {
        lemma_dec_rep_digits(n / 10);
    }
}

proof fn lemma_dec_val_of_rep(n: nat)
    ensures
        dec_val(dec_rep(n)) == n,
    decreases n,
{
    if n < 10 {
        assert((48 + n) as u8 == 48 + n);
        assert(dec_rep(n).last() == (48 + n) as u8);
        assert(dec_rep(n).drop_last() =~= Seq::<u8>::empty());
        assert(dec_val(dec_rep(n).drop_last()) == 0);
    } else {
        lemma_dec_val_of_rep(n / 10);
        let s = dec_rep(n / 10).push((48 + n % 10) as u8);
        assert(s.drop_last() =~= dec_rep(n / 10));
        vstd::arithmetic::div_mod::lemma_fundamental_div_mod(n as int, 10);
    }
}

proof fn lemma_parse_enc_u32(v: u32)
    ensures
        parse_u32_spec(enc_u32(v)) == v,
        enc_u32(v).len() >= 1,
        forall|i: int| 0 <= i < enc_u32(v).len() ==> 48 <= #[trigger] enc_u32(v)[i] <= 57,
{
    lemma_dec_rep_digits(v as nat);
    lemma_dec_val_of_rep(v as nat);
    assert(all_digits(enc_u32(v)));
}

proof fn lemma_parse_enc_i32(v: i32)
    ensures
        parse_i32_spec(enc_i32(v)) == v,
        enc_i32(v).len() >= 1,
        forall|i: int| 0 <= i < enc_i32(v).len() ==> 45 <= #[trigger] enc_i32(v)[i] <= 57,
{
    if v < 0 {
        let m = (-v) as nat;
        lemma_dec_rep_digits(m);
        lemma_dec_val_of_rep(m);
        let s = enc_i32(v);
        assert(s == seq![45u8] + dec_rep(m));
        let t = s.drop_first();
        assert(t =~= dec_rep(m));
        assert(all_digits(t));
        assert(forall|i: int| 0 <= i < s.len() ==> 45 <= #[trigger] s[i] <= 57) by {
            assert(forall|i: int| 1 <= i < s.len() ==> s[i] == dec_rep(m)[i - 1]);
        }
    } else {
        lemma_dec_rep_digits(v as nat);
        lemma_dec_val_of_rep(v as nat);
        assert(all_digits(enc_i32(v)));
    }
}

/// Parsing takes the input apart at its first newline.
proof fn lemma_parse_lines_cons(r: SaveRecord, line: Seq<u8>, rest: Seq<u8>)
    requires
        forall|i: int| 0 <= i < line.len() ==> #[trigger] line[i] != 10,
    ensures
        parse_lines(r, line + seq![10u8] + rest) == parse_lines(apply_line(r, line), rest),
{
    let s = line + seq![10u8] + rest;
    assert(s[line.len() as int] == 10);
    assert(forall|m: int| 0 <= m < line.len() ==> s[m] == line[m]);
    lemma_find_byte_first(s, 10, line.len() as int);
    assert(s.subrange(0, line.len() as int) =~= line);
    assert(s.subrange(line.len() as int + 1, s.len() as int) =~= rest);
}

/// On a canonical `key=value` line the split lands exactly on the first
/// `=`, and trimming changes nothing.
proof fn lemma_apply_canonical(line: Seq<u8>, key: Seq<u8>, val: Seq<u8>)
    requires
        line == key + seq![61u8] + val,
        key.len() >= 1,
        val.len() >= 1,
        forall|i: int| 0 <= i < key.len() ==> plain_key_byte(#[trigger] key[i]),
        forall|i: int| 0 <= i < val.len() ==> 45 <= #[trigger] val[i] <= 57,
    ensures
        find_byte(line, 61) == key.len(),
        line.subrange(0, key.len() as int) == key,
        line.subrange(key.len() as int + 1, line.len() as int) == val,
        trim_spec(key) == key,
        trim_spec(val) == val,
        forall|i: int| 0 <= i < line.len() ==> #[trigger] line[i] != 10,
{
    assert(line[key.len() as int] == 61);
    assert(forall|m: int| 0 <= m < key.len() ==> line[m] == key[m]);
    lemma_find_byte_first(line, 61, key.len() as int);
    assert(line.subrange(0, key.len() as int) =~= key);
    assert(line.subrange(key.len() as int + 1, line.len() as int) =~= val);
    assert(!is_blank(key[0]) && !is_blank(key.last()));
    assert(!is_blank(val[0]) && !is_blank(val.last()));
    assert(forall|i: int|
        key.len() < i < line.len() ==> #[trigger] line[i] == val[i - key.len() - 1]);
}

/// One canonical signed line lands its value in the named field.
proof fn lemma_line_i32(r: SaveRecord, key: Seq<u8>, v: i32)
    requires
        key == key_currency() || key == key_best(),
    ensures
        ({
            let line = key + seq![61u8] + enc_i32(v);
            &&& (key == key_currency() ==> apply_line(r, line) == (SaveRecord {
                currency: v,
                ..r
            }))
            &&& (key == key_best() ==> apply_line(r, line) == (SaveRecord { best: v, ..r }))
            &&& forall|i: int| 0 <= i < line.len() ==> #[trigger] line[i] != 10
        }),
{
    lemma_keys_plain();
    lemma_parse_enc_i32(v);
    let line = key + seq![61u8] + enc_i32(v);
    lemma_apply_canonical(line, key, enc_i32(v));
}

/// One canonical unsigned line lands its value in the named field.
proof fn lemma_line_u32(r: SaveRecord, key: Seq<u8>, v: u32)
    requires
        key == key_speed() || key == key_dash_cd() || key == key_dash_time() || key
            == key_shard_value() || key == key_magnet(),
    ensures
        ({
            let line = key + seq![61u8] + enc_u32(v);
            &&& (key == key_speed() ==> apply_line(r, line) == (SaveRecord { speed: v, ..r }))
            &&& (key == key_dash_cd() ==> apply_line(r, line) == (SaveRecord {
                dash_cd: v,
                ..r
            }))
            &&& (key == key_dash_time() ==> apply_line(r, line) == (SaveRecord {
                dash_time: v,
                ..r
            }))
            &&& (key == key_shard_value() ==> apply_line(r, line) == (SaveRecord {
                shard_value: v,
                ..r
            }))
            &&& (key == key_magnet() ==> apply_line(r, line) == (SaveRecord {
                magnet: v,
                ..r
            }))
            &&& forall|i: int| 0 <= i < line.len() ==> #[trigger] line[i] != 10
        }),
{
    lemma_keys_plain();
    lemma_parse_enc_u32(v);
    let line = key + seq![61u8] + enc_u32(v);
    lemma_apply_canonical(line, key, enc_u32(v));
}

/// Loading a freshly saved record yields the record back: the codec is a
/// round trip on every record.
#[verifier::rlimit(100)]
pub proof fn lemma_save_round_trip(r: SaveRecord)
    ensures
        parse_save_spec(encode_save_spec(r)) == r,
{
    let l1 = key_currency() + seq![61u8] + enc_i32(r.currency);
    let l2 = key_speed() + seq![61u8] + enc_u32(r.speed);
    let l3 = key_dash_cd() + seq![61u8] + enc_u32(r.dash_cd);
    let l4 = key_dash_time() + seq![61u8] + enc_u32(r.dash_time);
    let l5 = key_shard_value() + seq![61u8] + enc_u32(r.shard_value);
    let l6 = key_magnet() + seq![61u8] + enc_u32(r.magnet);
    let l7 = key_best() + seq![61u8] + enc_i32(r.best);
    let rest7 = Seq::<u8>::empty();
    let rest6 = l7 + seq![10u8] + rest7;
    let rest5 = l6 + seq![10u8] + rest6;
    let rest4 = l5 + seq![10u8] + rest5;
    let rest3 = l4 + seq![10u8] + rest4;
    let rest2 = l3 + seq![10u8] + rest3;
    let rest1 = l2 + seq![10u8] + rest2;
    let s = encode_save_spec(r);
    assert(s =~= l1 + seq![10u8] + rest1);
    let r0 = zero_record();
    lemma_line_i32(r0, key_currency(), r.currency);
    lemma_parse_lines_cons(r0, l1, rest1);
    let r1 = apply_line(r0, l1);
    lemma_line_u32(r1, key_speed(), r.speed);
    lemma_parse_lines_cons(r1, l2, rest2);
    let r2 = apply_line(r1, l2);
    lemma_line_u32(r2, key_dash_cd(), r.dash_cd);
    lemma_parse_lines_cons(r2, l3, rest3);
    let r3 = apply_line(r2, l3);
    lemma_line_u32(r3, key_dash_time(), r.dash_time);
    lemma_parse_lines_cons(r3, l4, rest4);
    let r4 = apply_line(r3, l4);
    lemma_line_u32(r4, key_shard_value(), r.shard_value);
    lemma_parse_lines_cons(r4, l5, rest5);
    let r5 = apply_line(r4, l5);
    lemma_line_u32(r5, key_magnet(), r.magnet);
    lemma_parse_lines_cons(r5, l6, rest6);
    let r6 = apply_line(r5, l6);
    lemma_line_i32(r6, key_best(), r.best);
    lemma_parse_lines_cons(r6, l7, rest7);
    let r7 = apply_line(r6, l7);
    assert(parse_lines(r7, rest7) == r7);
    assert(parse_save_spec(s) == r7);
    assert(r7 == r);
}

/// Whether the slices hold the same bytes.
fn bytes_eq(a: &[u8], b: &[u8]) -> (r: bool)
    ensures
        r == (a@ == b@),
{
    if a.len() != b.len() {
        return false;
    }
    let mut i: usize = 0;
    while i < a.len()
        invariant
            a@.len() == b@.len(),
            i <= a@.len(),
            forall|m: int| 0 <= m < i ==> a@[m] == b@[m],
        decreases a@.len() - i,
    {
        if *slice_index_get(a, i) != *slice_index_get(b, i) {
            return false;
        }
        i = i + 1;
    }
    proof {
        assert(a@ =~= b@);
    }
    true
}

/// First position of `b` in `s` at or after `from`; `s.len()` when absent.
fn find_byte_from(s: &[u8], from: usize, b: u8) -> (idx: usize)
    requires
        from <= s@.len(),
    ensures
        from <= idx <= s@.len(),
        idx < s@.len() ==> s@[idx as int] == b,
        forall|m: int| from <= m < idx ==> s@[m] != b,
    decreases s@.len() - from,
{
    let mut i: usize = from;
    while i < s.len()
        invariant
            from <= i <= s@.len(),
            forall|m: int| from <= m < i ==> s@[m] != b,
        decreases s@.len() - i,
    {
        if *slice_index_get(s, i) == b {
            return i;
        }
        i = i + 1;
    }
    i
}

/// The subslice with blanks stripped from both ends.
fn trim_exec<'a>(s: &'a [u8]) -> (out: &'a [u8])
    ensures
        out@ == trim_spec(s@),
{
    proof {
        assert(s@.subrange(0, s@.len() as int) =~= s@);
    }
    let mut k: usize = 0;
    loop
        invariant
            k <= s@.len(),
            trim_front(s@) == trim_front(s@.subrange(k as int, s@.len() as int)),
        ensures
            k <= s@.len(),
            trim_front(s@) == s@.subrange(k as int, s@.len() as int),
        decreases s@.len() - k,
    {
        if k >= s.len() {
            break;
        }
        let c: u8 = *slice_index_get(s, k);
        if !(c == 32 || c == 9 || c == 13) {
            break;
        }
        proof {
            let cur = s@.subrange(k as int, s@.len() as int);
            assert(cur.drop_first() =~= s@.subrange(k + 1, s@.len() as int));
        }
        k = k + 1;
    }
    let mut j: usize = s.len();
    loop
        invariant
            k <= j <= s@.len(),
            trim_back(s@.subrange(k as int, s@.len() as int)) == trim_back(
                s@.subrange(k as int, j as int),
            ),
        ensures
            k <= j <= s@.len(),
            trim_back(s@.subrange(k as int, s@.len() as int)) == s@.subrange(k as int, j as int),
        decreases j,
    {
        if j <= k {
            break;
        }
        let c: u8 = *slice_index_get(s, j - 1);
        if !(c == 32 || c == 9 || c == 13) {
            break;
        }
        proof {
            let cur = s@.subrange(k as int, j as int);
            assert(cur.drop_last() =~= s@.subrange(k as int, j - 1));
        }
        j = j - 1;
    }
    slice_subrange(s, k, j)
}

/// Reads a digit run, saturating far above every field range so the
/// saturated value still witnesses the overflow.
fn scan_digits(s: &[u8]) -> (r: Option<u64>)
    ensures
        match r {
            Some(v) => {
                &&& s@.len() > 0
                &&& all_digits(s@)
                &&& v == (if dec_val(s@) <= 100_000_000_000 {
                    dec_val(s@) as int
                } else {
                    100_000_000_000int
                })
            },
            None => !(s@.len() > 0 && all_digits(s@)),
        },
{
    if s.len() == 0 {
        return None;
    }
    let mut acc: u64 = 0;
    let mut i: usize = 0;
    while i < s.len()
        invariant
            i <= s@.len(),
            all_digits(s@.subrange(0, i as int)),
            acc == (if dec_val(s@.subrange(0, i as int)) <= 100_000_000_000 {
                dec_val(s@.subrange(0, i as int)) as int
            } else {
                100_000_000_000int
            }),
        decreases s@.len() - i,
    {
        let c: u8 = *slice_index_get(s, i);
        if c < 48 || c > 57 {
            return None;
        }
        proof {
            let pre = s@.subrange(0, i as int);
            let nxt = s@.subrange(0, i + 1);
            assert(nxt.drop_last() =~= pre);
            assert(nxt.last() == s@[i as int]);
            assert(forall|m: int| 0 <= m < nxt.len() ==> is_digit(#[trigger] nxt[m]));
        }
        let d: u64 = (c - 48) as u64;
        let na: u64 = acc * 10 + d;
        acc = if na > 100_000_000_000 {
            100_000_000_000
        } else {
            na
        };
        i = i + 1;
    }
    proof {
        assert(s@.subrange(0, s@.len() as int) =~= s@);
    }
    Some(acc)
}

/// A `u32` field value: digits (optionally `+`-signed) or the 0 default.
fn parse_u32_field(s: &[u8]) -> (r: u32)
    ensures
        r == parse_u32_spec(s@),
{
    let t: &[u8] = if s.len() > 0 && *slice_index_get(s, 0) == 43 {
        let rest = slice_subrange(s, 1, s.len());
        proof {
            assert(rest@ =~= s@.drop_first());
        }
        rest
    } else {
        s
    };
    match scan_digits(t) {
        Some(v) => {
            if v <= 0xFFFF_FFFF {
                v as u32
            } else {
                0
            }
        },
        None => 0,
    }
}

/// An `i32` field value: signed digits or the 0 default.
fn parse_i32_field(s: &[u8]) -> (r: i32)
    ensures
        r == parse_i32_spec(s@),
{
    if s.len() > 0 && *slice_index_get(s, 0) == 45 {
        let rest = slice_subrange(s, 1, s.len());
        proof {
            assert(rest@ =~= s@.drop_first());
        }
        match scan_digits(rest) {
            Some(v) => {
                if v <= 2_147_483_648 {
                    (-(v as i64)) as i32
                } else {
                    0
                }
            },
            None => 0,
        }
    } else {
        let t: &[u8] = if s.len() > 0 && *slice_index_get(s, 0) == 43 {
            let rest = slice_subrange(s, 1, s.len());
            proof {
                assert(rest@ =~= s@.drop_first());
            }
            rest
        } else {
            s
        };
        match scan_digits(t) {
            Some(v) => {
                if v <= 2_147_483_647 {
                    v as i32
                } else {
                    0
                }
            },
            None => 0,
        }
    }
}

/// Applies one `key=value` line to the record.
fn apply_line_exec(rec: &mut SaveRecord, line: &[u8])
    ensures
        *final(rec) == apply_line(*old(rec), line@),
{
    let eq: usize = find_byte_from(line, 0, 61);
    proof {
        lemma_find_byte_first(line@, 61, eq as int);
    }
    if eq == line.len() {
        return;
    }
    let k0 = slice_subrange(line, 0, eq);
    let v0 = slice_subrange(line, eq + 1, line.len());
    let k = trim_exec(k0);
    let v = trim_exec(v0);
    let kc = key_bytes(FieldTag::Currency);
    let ks = key_bytes(FieldTag::Speed);
    let kdc = key_bytes(FieldTag::DashCd);
    let kdt = key_bytes(FieldTag::DashTime);
    let ksv = key_bytes(FieldTag::ShardValue);
    let km = key_bytes(FieldTag::Magnet);
    let kb = key_bytes(FieldTag::Best);
    if bytes_eq(k, kc.as_slice()) {
        rec.currency = parse_i32_field(v);
    } else if bytes_eq(k, ks.as_slice()) {
        rec.speed = parse_u32_field(v);
    } else if bytes_eq(k, kdc.as_slice()) {
        rec.dash_cd = parse_u32_field(v);
    } else if bytes_eq(k, kdt.as_slice()) {
        rec.dash_time = parse_u32_field(v);
    } else if bytes_eq(k, ksv.as_slice()) {
        rec.shard_value = parse_u32_field(v);
    } else if bytes_eq(k, km.as_slice()) {
        rec.magnet = parse_u32_field(v);
    } else if bytes_eq(k, kb.as_slice()) {
        rec.best = parse_i32_field(v);
    }
}

/// Loads a record from file bytes; every malformed piece falls back to 0.
pub fn parse_save(data: &[u8]) -> (r: SaveRecord)
    ensures
        r == parse_save_spec(data@),
{
    let mut rec = SaveRecord::zero();
    let mut pos: usize = 0;
    proof {
        assert(data@.subrange(0, data@.len() as int) =~= data@);
    }
    while pos < data.len()
        invariant
            pos <= data@.len(),
            parse_save_spec(data@) == parse_lines(
                rec,
                data@.subrange(pos as int, data@.len() as int),
            ),
        decreases data@.len() - pos,
    {
        let nl: usize = find_byte_from(data, pos, 10);
        proof {
            let rest = data@.subrange(pos as int, data@.len() as int);
            assert(forall|m: int|
                0 <= m < rest.len() ==> #[trigger] rest[m] == data@[pos + m]);
            lemma_find_byte_first(rest, 10, nl - pos);
            assert(rest.subrange(0, nl - pos) =~= data@.subrange(pos as int, nl as int));
            if nl < data.len() {
                assert(rest.subrange(nl - pos + 1, rest.len() as int) =~= data@.subrange(
                    nl + 1,
                    data@.len() as int,
                ));
            }
        }
        let line = slice_subrange(data, pos, nl);
        apply_line_exec(&mut rec, line);
        if nl == data.len() {
            proof {
                assert(data@.subrange(data@.len() as int, data@.len() as int).len() == 0);
            }
            pos = data.len();
        } else {
            pos = nl + 1;
        }
    }
    proof {
        assert(data@.subrange(pos as int, data@.len() as int).len() == 0);
    }
    rec
}

/// Appends the digits of `n`.
fn push_u64(out: &mut Vec<u8>, n: u64)
    ensures
        final(out)@ == old(out)@ + dec_rep(n as nat),
    decreases n,
{
    if n < 10 {
        out.push(48 + n as u8);
        proof {
            assert(out@ =~= old(out)@ + dec_rep(n as nat));
        }
    } else {
        push_u64(out, n / 10);
        out.push(48 + (n % 10) as u8);
        proof {
            assert(out@ =~= old(out)@ + dec_rep(n as nat));
        }
    }
}

/// Appends a signed value.
fn push_i32(out: &mut Vec<u8>, v: i32)
    ensures
        final(out)@ == old(out)@ + enc_i32(v),
{
    if v < 0 {
        out.push(45);
        let mag: u64 = (-(v as i64)) as u64;
        push_u64(out, mag);
        proof {
            assert(out@ =~= old(out)@ + enc_i32(v));
        }
    } else {
        push_u64(out, v as u64);
    }
}

/// Appends all of `add`.
fn append_bytes(out: &mut Vec<u8>, add: &Vec<u8>)
    ensures
        final(out)@ == old(out)@ + add@,
{
    let mut i: usize = 0;
    while i < add.len()
        invariant
            i <= add@.len(),
            out@ == old(out)@ + add@.subrange(0, i as int),
        decreases add@.len() - i,
    {
        out.push(add[i]);
        proof {
            assert(old(out)@ + add@.subrange(0, i + 1) =~= (old(out)@ + add@.subrange(
                0,
                i as int,
            )).push(add@[i as int]));
        }
        i = i + 1;
    }
    proof {
        assert(add@.subrange(0, add@.len() as int) =~= add@);
    }
}

/// Writes one `key=value` line.
fn push_field_u32(out: &mut Vec<u8>, tag: FieldTag, v: u32)
    ensures
        final(out)@ == old(out)@ + key_seq(tag) + seq![61u8] + enc_u32(v) + seq![10u8],
{
    let kb = key_bytes(tag);
    append_bytes(out, &kb);
    out.push(61);
    proof {
        assert(out@ =~= old(out)@ + key_seq(tag) + seq![61u8]);
    }
    push_u64(out, v as u64);
    out.push(10);
    proof {
        assert(out@ =~= old(out)@ + key_seq(tag) + seq![61u8] + enc_u32(v) + seq![10u8]);
    }
}

fn push_field_i32(out: &mut Vec<u8>, tag: FieldTag, v: i32)
    ensures
        final(out)@ == old(out)@ + key_seq(tag) + seq![61u8] + enc_i32(v) + seq![10u8],
{
    let kb = key_bytes(tag);
    append_bytes(out, &kb);
    out.push(61);
    proof {
        assert(out@ =~= old(out)@ + key_seq(tag) + seq![61u8]);
    }
    push_i32(out, v);
    out.push(10);
    proof {
        assert(out@ =~= old(out)@ + key_seq(tag) + seq![61u8] + enc_i32(v) + seq![10u8]);
    }
}

/// Writes the record in the canonical seven-line form.
pub fn encode_save(r: &SaveRecord) -> (out: Vec<u8>)
    ensures
        out@ == encode_save_spec(*r),
{
    let mut out: Vec<u8> = Vec::new();
    push_field_i32(&mut out, FieldTag::Currency, r.currency);
    push_field_u32(&mut out, FieldTag::Speed, r.speed);
    push_field_u32(&mut out, FieldTag::DashCd, r.dash_cd);
    push_field_u32(&mut out, FieldTag::DashTime, r.dash_time);
    push_field_u32(&mut out, FieldTag::ShardValue, r.shard_value);
    push_field_u32(&mut out, FieldTag::Magnet, r.magnet);
    push_field_i32(&mut out, FieldTag::Best, r.best);
    proof {
        assert(out@ =~= encode_save_spec(*r));
    }
    out
}

} // verus!
