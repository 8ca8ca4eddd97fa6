//! Template 7.200, run-length packing with level values: octets that name a
//! level, each followed by the octets that spell how often it stands.

use crate::bytes::be_uint_at;
use crate::bytes::lemma_be_uint_1;
use crate::bytes::ByteReader;
use crate::decimal;
use crate::decimal_text;
use crate::invalid_data;
use crate::templates::data_representation::DataRepresentationTemplate5_200;
use crate::templates::data_representation::DataRepresentationTemplate5_200View;
use crate::Error;
use crate::Failure;
use vstd::arithmetic::power::lemma_pow0;
use vstd::arithmetic::power::lemma_pow_positive;
use vstd::arithmetic::power::pow;
use vstd::prelude::*;

verus! {

broadcast use crate::bytes::lemma_offset_natural;

/// One run of run-length packing: a level and how often it stands.
pub struct Run {
    pub level: u8,
    pub length: int,
}

/// Where the run whose octets behind the level start at `from` ends: at the
/// first octet from there on that is no more than `mv`, or at the end of the
/// body.
pub open spec fn run_end(body: Seq<u8>, mv: u16, from: int) -> int
    decreases body.len() - from,
{
    if from < 0 || from >= body.len() || body[from] <= mv {
        from
    } else {
        run_end(body, mv, from + 1)
    }
}

/// The length of the run whose octets behind the level are those from `from`
/// up to `to`: one, and for the octet in place `j` behind the level what it
/// has over `mv + 1`, times `255 - mv` to the `j`.
pub open spec fn run_length(body: Seq<u8>, mv: u16, from: int, to: int) -> int
    decreases to - from,
{
    if to <= from {
        1
    } else {
        run_length(body, mv, from, to - 1) + (body[to - 1] - mv - 1) * pow(
            255 - mv,
            (to - 1 - from) as nat,
        )
    }
}

/// The runs of `body` from the level at `at` on.
pub open spec fn runs_from(body: Seq<u8>, mv: u16, at: int) -> Seq<Run>
    decreases body.len() - at,
{
    if at < 0 || at >= body.len() {
        Seq::empty()
    } else {
        proof {
            lemma_run_end(body, mv, at + 1);
        }
        let end = run_end(body, mv, at + 1);
        seq![Run { level: body[at], length: run_length(body, mv, at + 1, end) }] + runs_from(
            body,
            mv,
            end,
        )
    }
}

/// The sample that a level stands for: none for level 0, else the level's
/// entry in the table, counted from 1.
pub open spec fn level_sample(table: Seq<i16>, level: u8) -> i32 {
    if level == 0 {
        i32::MIN
    } else {
        table[level - 1] as i32
    }
}

/// What the error for a run that cannot be written out says: its length has
/// to be an unsigned 32-bit number, and its level 0 or in the table.
pub open spec fn run_fault(table: Seq<i16>, run: Run) -> Option<Seq<char>> {
    if run.length > u32::MAX {
        Some("a run is longer than an unsigned 32-bit number"@)
    } else if run.level != 0 && run.level - 1 >= table.len() {
        Some("a level is not in the table of level values"@)
    } else {
        None
    }
}

/// What the error for the first of `runs` that cannot be written out says.
pub open spec fn first_fault(table: Seq<i16>, runs: Seq<Run>) -> Option<Seq<char>>
    decreases runs.len(),
{
    if runs.len() == 0 {
        None
    } else if run_fault(table, runs.first()) is Some {
        run_fault(table, runs.first())
    } else {
        first_fault(table, runs.drop_first())
    }
}

/// What the error for a width other than 8 bits says.
pub open spec fn width_text(got: u8) -> Seq<char> {
    "Only supports 8 bits in our 7.200 implementation, but got "@ + decimal(got as nat)
}

/// The samples of `runs`, each run written out in full.
pub open spec fn runs_expanded(table: Seq<i16>, runs: Seq<Run>) -> Seq<i32>
    decreases runs.len(),
{
    if runs.len() == 0 {
        Seq::empty()
    } else {
        runs_expanded(table, runs.drop_last()) + Seq::new(
            runs.last().length as nat,
            |i: int| level_sample(table, runs.last().level),
        )
    }
}

/// What template 7.200 makes of a body of `size` octets at the front of
/// `unread` under the template `t`: the samples, or the kind of failure.
///
/// The first octet is a level. An octet over `mv` adds to the length of the
/// run of the level before it; an octet of `mv` or less is the level of the
/// next run. One octet is read even where `size` is 0.
pub open spec fn run_length_unpacked(
    t: DataRepresentationTemplate5_200View,
    unread: Seq<u8>,
    size: int,
) -> Result<Seq<i32>, Failure> {
    let table = t.mvl_scaled_representative_values;
    let runs = runs_from(unread.take(size), t.mv, 0);
    if t.number_of_bits != 8 {
        Err(Failure::Unsupported(width_text(t.number_of_bits)))
    } else if unread.len() < size || unread.len() < 1 {
        Err(Failure::Io)
    } else {
        match first_fault(table, runs) {
            Some(text) => Err(Failure::InvalidData(text)),
            None => Ok(runs_expanded(table, runs)),
        }
    }
}

/// A run ends inside the body or at its end, behind octets that are all over
/// `mv`.
pub proof fn lemma_run_end(body: Seq<u8>, mv: u16, from: int)
    requires
        0 <= from <= body.len(),
    ensures
        from <= run_end(body, mv, from) <= body.len(),
        forall|j: int| from <= j < run_end(body, mv, from) ==> body[j] > mv,
        run_end(body, mv, from) < body.len() ==> body[run_end(body, mv, from)] <= mv,
    decreases body.len() - from,
{
    if from < body.len() && body[from] > mv {
        lemma_run_end(body, mv, from + 1);
    }
}

/// The end of a run is the first place behind octets over `mv` that holds
/// none.
proof fn lemma_run_end_is(body: Seq<u8>, mv: u16, from: int, to: int)
    requires
        0 <= from <= to <= body.len(),
        forall|j: int| from <= j < to ==> body[j] > mv,
        to == body.len() || body[to] <= mv,
    ensures
        run_end(body, mv, from) == to,
    decreases to - from,
{
    if from < to {
        lemma_run_end_is(body, mv, from + 1, to);
    }
}

/// Octets over `mv` never take from the length of a run.
proof fn lemma_run_length_grows(body: Seq<u8>, mv: u16, from: int, to: int, end: int)
    requires
        0 <= from <= to <= end <= body.len(),
        forall|j: int| from <= j < end ==> body[j] > mv,
    ensures
        run_length(body, mv, from, to) <= run_length(body, mv, from, end),
    decreases end - to,
{
    if to < end {
        lemma_run_length_grows(body, mv, from, to, end - 1);
        assert(body[end - 1] > mv);
        lemma_pow_positive(255 - mv, (end - 1 - from) as nat);
        assert(0 <= (body[end - 1] - mv - 1) * pow(255 - mv, (end - 1 - from) as nat))
            by (nonlinear_arith)
            requires
                0 <= body[end - 1] - mv - 1,
                0 < pow(255 - mv, (end - 1 - from) as nat),
        ;
    }
}

/// The error for a width other than 8 bits.
fn unsupported_width(got: u8) -> (e: Error)
    ensures
        e.failure() == Failure::Unsupported(width_text(got)),
{
    Error::UnsupportedData(
        String::from_str("Only supports 8 bits in our 7.200 implementation, but got ").concat(
            decimal_text(got).as_str(),
        ),
    )
}

/// Template 7.200 (Run length packing with level values)
///
/// Only a width of 8 bits is supported. What comes back for a body of `size`
/// octets, and what failure, is what [`run_length_unpacked`] says. After a
/// success the reader stands behind the body, or behind the one octet that
/// is read where `size` is 0; after invalid data it stands behind the body
/// too. Where the width is unsupported or the octets are not there, nothing
/// is read. The number of values that the section announces plays no part
/// in the decoding.
#[allow(unused_variables)]
pub fn read_data_7_200(
    reader: &mut ByteReader,
    size: usize,
    number_of_values: u32,
    drs_template: &DataRepresentationTemplate5_200,
) -> (r: Result<Vec<i32>, Error>)
    ensures
        final(reader).bytes() == old(reader).bytes(),
        match run_length_unpacked(
            drs_template@,
            old(reader).bytes().skip(old(reader).offset()),
            size as int,
        ) {
            Ok(samples) => (r matches Ok(values) && values@ == samples) && final(reader).advanced(
                *old(reader),
                if size == 0 {
                    1
                } else {
                    size as int
                },
            ),
            Err(f) => (r matches Err(e) && e.failure() == f) && (if f is InvalidData {
                final(reader).advanced(*old(reader), size as int)
            } else {
                *final(reader) == *old(reader)
            }),
        },
{
    if drs_template.number_of_bits != 8 {
        return Err(unsupported_width(drs_template.number_of_bits));
    }
    let ghost table = drs_template@.mvl_scaled_representative_values;
    let ghost unread = reader.bytes().skip(reader.offset());
    let ghost body = unread.take(size as int);
    let ghost expected = run_length_unpacked(drs_template@, unread, size as int);
    let mv = drs_template.mv;
    proof {
        use_type_invariant(&*reader);
    }
    let mut octets = reader.take(if size == 0 { 1 } else { size })?;
    let mut values: Vec<i32> = Vec::new();
    let mut lv = octets.read_u8()?;
    let mut p: usize = 0;
    let ghost mut done: Seq<Run> = Seq::empty();
    proof {
        lemma_octet_at(octets.bytes(), 0);
    }
    while p < size
        invariant
            0 <= p <= size,
            size > 0 ==> octets.bytes() == body,
            body.len() == size,
            mv == drs_template.mv,
            table == drs_template@.mvl_scaled_representative_values,
            reader.bytes() == old(reader).bytes(),
            size > 0 ==> reader.advanced(*old(reader), size as int),
            expected == run_length_unpacked(
                drs_template@,
                old(reader).bytes().skip(old(reader).offset()),
                size as int,
            ),
            expected == (match first_fault(table, runs_from(body, mv, p as int)) {
                Some(text) => Err::<Seq<i32>, Failure>(Failure::InvalidData(text)),
                None => Ok(runs_expanded(table, runs_from(body, mv, 0))),
            }),
            p < size ==> octets.offset() == p + 1,
            p < size ==> lv == body[p as int],
            runs_from(body, mv, 0) == done + runs_from(body, mv, p as int),
            values@ == runs_expanded(table, done),
        decreases size - p,
    {
        let ghost start = p as int;
        p += 1;
        let mut run_length: u64 = 1;
        let mut m: u64 = 1;
        let mut next: u8 = 0;
        proof {
            lemma_pow0(255 - mv);
            lemma_run_end(body, mv, start + 1);
            if p == size {
                lemma_run_end_is(body, mv, start + 1, p as int);
            }
        }
        let ghost end = run_end(body, mv, start + 1);
        let ghost run = Run { level: lv, length: self::run_length(body, mv, start + 1, end) };
        assert((seq![run] + runs_from(body, mv, end)).drop_first() == runs_from(body, mv, end));
        while p < size
            invariant_except_break
                octets.offset() == p,
            invariant
                0 <= start < p <= size,
                octets.bytes() == body,
                body.len() == size,
                mv == drs_template.mv,
                reader.bytes() == old(reader).bytes(),
                reader.advanced(*old(reader), size as int),
                expected == run_length_unpacked(
                    drs_template@,
                    old(reader).bytes().skip(old(reader).offset()),
                    size as int,
                ),
                expected == (match first_fault(table, seq![run] + runs_from(body, mv, end)) {
                    Some(text) => Err::<Seq<i32>, Failure>(Failure::InvalidData(text)),
                    None => Ok(runs_expanded(table, runs_from(body, mv, 0))),
                }),
                end == run_end(body, mv, start + 1),
                run.length == self::run_length(body, mv, start + 1, end),
                p <= end <= size,
                p == size ==> p == end,
                forall|j: int| start < j < p ==> body[j] > mv,
                p > start + 1 ==> mv < 255,
                run_length == self::run_length(body, mv, start + 1, p as int),
                1 <= run_length <= u32::MAX,
                m == if pow(255 - mv, (p - start - 1) as nat) < 0x1_0000_0000 {
                    pow(255 - mv, (p - start - 1) as nat)
                } else {
                    0x1_0000_0000
                },
            ensures
                start < p <= size,
                p < size ==> octets.offset() == p + 1,
                p < size ==> next == body[p as int],
                p == end,
                run_length == run.length,
                run_length <= u32::MAX,
            decreases size - p,
        {
            proof {
                lemma_octet_at(body, p as int);
            }
            next = octets.read_u8()?;
            if next as u16 > mv {
                let digit = (next as u16 - mv - 1) as u64;
                let ghost weight = pow(255 - mv, (p - start - 1) as nat);
                proof {
                    lemma_pow_positive(255 - mv, (p - start - 1) as nat);
                    assert(0 <= digit * m <= 255 * 0x1_0000_0000) by (nonlinear_arith)
                        requires
                            0 <= digit <= 255,
                            0 <= m <= 0x1_0000_0000,
                    ;
                    assert(digit * m <= digit * weight) by (nonlinear_arith)
                        requires
                            0 <= digit,
                            m <= weight,
                    ;
                    assert(digit * m > u32::MAX || digit * m == digit * weight) by (nonlinear_arith)
                        requires
                            0 <= digit,
                            m == weight || (m == 0x1_0000_0000 && m <= weight),
                    ;
                    assert(self::run_length(body, mv, start + 1, p + 1) == run_length + digit
                        * weight);
                    lemma_run_end_at_least(body, mv, start + 1, p + 1);
                }
                let longer = run_length + digit * m;
                if longer > u32::MAX as u64 {
                    proof {
                        lemma_run_end(body, mv, start + 1);
                        lemma_run_length_grows(body, mv, start + 1, p + 1, end);
                    }
                    return Err(invalid_data("a run is longer than an unsigned 32-bit number"));
                }
                run_length = longer;
                proof {
                    reveal(pow);
                    assert(m * (255 - mv) >= m && (m == weight ==> m * (255 - mv) == (255 - mv)
                        * weight) && (m <= weight ==> m * (255 - mv) <= (255 - mv) * weight)
                        && m * (255 - mv) <= 0x1_0000_0000 * 255) by (nonlinear_arith)
                        requires
                            1 <= 255 - mv <= 255,
                            0 < m <= 0x1_0000_0000,
                    ;
                }
                m = m * ((255 - mv) as u64);
                if m > 0x1_0000_0000 {
                    m = 0x1_0000_0000;
                }
                p += 1;
                proof {
                    if p == size {
                        lemma_run_end_is(body, mv, start + 1, p as int);
                    }
                }
            } else {
                proof {
                    lemma_run_end_is(body, mv, start + 1, p as int);
                }
                break ;
            }
        }
        let value = if lv == 0 {
            i32::MIN
        } else if ((lv - 1) as usize) < drs_template.mvl_scaled_representative_values.len() {
            drs_template.mvl_scaled_representative_values[(lv - 1) as usize] as i32
        } else {
            return Err(invalid_data("a level is not in the table of level values"));
        };
        let ghost before = values@;
        let mut k: u64 = 0;
        while k < run_length
            invariant
                k <= run_length,
                values@ == before + Seq::new(k as nat, |i: int| value),
            decreases run_length - k,
        {
            values.push(value);
            k += 1;
        }
        proof {
            assert(done.push(run).drop_last() =~= done);
            assert(Seq::new(run.length as nat, |i: int| value) =~= Seq::new(
                run.length as nat,
                |i: int| level_sample(table, run.level),
            ));
            done = done.push(run);
        }
        lv = next;
    }
    Ok(values)
}

/// The octet at `at` of a body, as the reader's contract names it.
proof fn lemma_octet_at(bytes: Seq<u8>, at: int)
    requires
        0 <= at < bytes.len(),
    ensures
        be_uint_at(bytes, at, 1) == bytes[at],
{
    lemma_be_uint_1(bytes.subrange(at, at + 1));
}

/// A run does not end before an octet over `mv`.
proof fn lemma_run_end_at_least(body: Seq<u8>, mv: u16, from: int, to: int)
    requires
        0 <= from <= to <= body.len(),
        forall|j: int| from <= j < to ==> body[j] > mv,
    ensures
        to <= run_end(body, mv, from),
    decreases to - from,
{
    if from < to {
        lemma_run_end_at_least(body, mv, from + 1, to);
    } else {
        lemma_run_end(body, mv, from);
    }
}

/// The number of samples that `runs` stand for.
pub open spec fn total_length(runs: Seq<Run>) -> int
    decreases runs.len(),
{
    if runs.len() == 0 {
        0
    } else {
        total_length(runs.drop_last()) + runs.last().length
    }
}

/// Runs written out in full give as many samples as their lengths add up
/// to.
pub proof fn lemma_runs_expanded_len(table: Seq<i16>, runs: Seq<Run>)
    requires
        forall|i: int| 0 <= i < runs.len() ==> (#[trigger] runs[i]).length >= 0,
    ensures
        runs_expanded(table, runs).len() == total_length(runs),
        total_length(runs) >= 0,
    decreases runs.len(),
{
    if runs.len() > 0 {
        lemma_runs_expanded_len(table, runs.drop_last());
    }
}

/// Every sample of run `r` is the sample of its level: `i32::MIN` for level
/// 0, else the level's entry in the table.
pub proof fn lemma_run_samples(table: Seq<i16>, runs: Seq<Run>, r: int, k: int)
    requires
        forall|i: int| 0 <= i < runs.len() ==> (#[trigger] runs[i]).length >= 0,
        0 <= r < runs.len(),
        0 <= k < runs[r].length,
    ensures
        0 <= total_length(runs.take(r)) + k < runs_expanded(table, runs).len(),
        runs_expanded(table, runs)[total_length(runs.take(r)) + k] == level_sample(
            table,
            runs[r].level,
        ),
    decreases runs.len(),
{
    let before = runs.drop_last();
    lemma_runs_expanded_len(table, before);
    lemma_runs_expanded_len(table, runs.take(r));
    if r < runs.len() - 1 {
        assert(before.take(r) == runs.take(r));
        lemma_run_samples(table, before, r, k);
    }
}

/// Every run of a body is at least one sample long.
pub proof fn lemma_runs_are_not_empty(body: Seq<u8>, mv: u16, at: int)
    requires
        0 <= at,
    ensures
        forall|i: int|
            0 <= i < runs_from(body, mv, at).len() ==> (#[trigger] runs_from(
                body,
                mv,
                at,
            )[i]).length >= 1,
    decreases body.len() - at,
{
    if at < body.len() {
        lemma_run_end(body, mv, at + 1);
        let end = run_end(body, mv, at + 1);
        lemma_run_length_grows(body, mv, at + 1, at + 1, end);
        lemma_runs_are_not_empty(body, mv, end);
        let runs = runs_from(body, mv, at);
        let later = runs_from(body, mv, end);
        assert forall|i: int| 0 <= i < runs.len() implies (#[trigger] runs[i]).length >= 1 by {
            if i > 0 {
                assert(runs[i] == later[i - 1]);
            }
        }
    }
}

} // verus!
