//! The voicebank ledger: one line per recording, with its alias and five
//! timing markers in milliseconds.
//!
//! A line reads `file=alias,offset,consonant,cutoff,preutterance,overlap`.
//! The file name ends at the first `=`, so it may hold commas; the alias may
//! not.

use vstd::prelude::*;
use vstd::slice::slice_subrange;
use vstd::string::StringSliceAdditionalSpecFns;
use crate::bytes::{
    byte_views, bytes_eq, copy_range, find_from, index_of, lemma_first_index_is_index_of,
    lemma_split_first, lemma_split_nonempty, lemma_split_single, split, split_bytes,
};

verus! {

/// The byte `=`, which ends the file name.
pub const EQUALS: u8 = 61;

/// The byte `,`, which parts the fields.
pub const COMMA: u8 = 44;

/// The line feed.
pub const NEWLINE: u8 = 10;

/// The carriage return.
pub const CARRIAGE_RETURN: u8 = 13;

/// The byte `-`.
pub const MINUS: u8 = 45;

/// The byte `+`.
pub const PLUS: u8 = 43;

/// The digit `0`.
pub const ZERO: u8 = 48;

/// Why a ledger line was refused.
#[derive(Debug, Clone, Copy, PartialEq, Eq, Structural)]
pub enum ParseErrorKind {
    /// The line has no `=` after the file name.
    MissingSeparator,
    /// The part after `=` does not have exactly six fields.
    FieldCount,
    /// One of the five timing fields is not a signed decimal integer that
    /// fits 32 bits.
    InvalidNumber,
}

/// A refused ledger: the first line that failed, counted from zero, and why.
#[derive(Debug, Clone, Copy, PartialEq, Eq, Structural)]
pub struct ParseError {
    pub line: usize,
    pub kind: ParseErrorKind,
}

/// One ledger record.
#[derive(Debug, Clone)]
pub struct OtoEntry {
    pub file: Vec<u8>,
    pub alias: Vec<u8>,
    pub offset: i32,
    pub consonant: i32,
    pub cutoff: i32,
    pub preutterance: i32,
    pub overlap: i32,
}

/// What a ledger record holds.
pub struct OtoEntryView {
    pub file: Seq<u8>,
    pub alias: Seq<u8>,
    pub offset: i32,
    pub consonant: i32,
    pub cutoff: i32,
    pub preutterance: i32,
    pub overlap: i32,
}

impl View for OtoEntry {
    type V = OtoEntryView;

    open spec fn view(&self) -> OtoEntryView {
        OtoEntryView {
            file: self.file@,
            alias: self.alias@,
            offset: self.offset,
            consonant: self.consonant,
            cutoff: self.cutoff,
            preutterance: self.preutterance,
            overlap: self.overlap,
        }
    }
}

/// Whether a byte is a decimal digit.
pub open spec fn is_digit(b: u8) -> bool {
    ZERO <= b <= ZERO + 9
}

/// Whether all bytes are decimal digits.
pub open spec fn all_digits(d: Seq<u8>) -> bool {
    forall|i: int| 0 <= i < d.len() ==> is_digit(#[trigger] d[i])
}

/// The number that a string of decimal digits denotes.
pub open spec fn decimal(d: Seq<u8>) -> nat
    decreases d.len(),
{
    if d.len() == 0 {
        0
    } else {
        decimal(d.drop_last()) * 10 + (d.last() - ZERO) as nat
    }
}

/// The digits of a timing field: the field without its sign.
pub open spec fn digits_of(s: Seq<u8>) -> Seq<u8> {
    if s.len() > 0 && (s[0] == MINUS || s[0] == PLUS) {
        s.skip(1)
    } else {
        s
    }
}

/// The number that a timing field denotes, sign included.
pub open spec fn signed_value(s: Seq<u8>) -> int {
    if s.len() > 0 && s[0] == MINUS {
        -(decimal(digits_of(s)) as int)
    } else {
        decimal(digits_of(s)) as int
    }
}

/// The value of a timing field: an optional sign and at least one decimal
/// digit, denoting a number that fits 32 bits.
pub open spec fn parse_int(s: Seq<u8>) -> Option<i32> {
    if digits_of(s).len() > 0 && all_digits(digits_of(s)) && i32::MIN <= signed_value(s) <= i32::MAX {
        Some(signed_value(s) as i32)
    } else {
        None
    }
}

/// The decimal digits of a number, without leading zeros.
pub open spec fn digits(n: nat) -> Seq<u8>
    decreases n,
{
    if n < 10 {
        seq![(ZERO + n) as u8]
    } else {
        digits(n / 10).push((ZERO + n % 10) as u8)
    }
}

/// A number as a timing field: a minus sign for a negative one, then its
/// digits.
pub open spec fn format_int(i: i32) -> Seq<u8> {
    if i < 0 {
        seq![MINUS] + digits((-i) as nat)
    } else {
        digits(i as nat)
    }
}

/// The record that a ledger line holds, or why it holds none.
pub open spec fn parse_line(line: Seq<u8>) -> Result<OtoEntryView, ParseErrorKind> {
    let eq = index_of(line, EQUALS);
    let fields = split(line.skip(eq + 1), COMMA);
    if eq >= line.len() {
        Err(ParseErrorKind::MissingSeparator)
    } else if fields.len() != 6 {
        Err(ParseErrorKind::FieldCount)
    } else if parse_int(fields[1]) is None || parse_int(fields[2]) is None || parse_int(fields[3]) is None
        || parse_int(fields[4]) is None || parse_int(fields[5]) is None {
        Err(ParseErrorKind::InvalidNumber)
    } else {
        Ok(
            OtoEntryView {
                file: line.take(eq),
                alias: fields[0],
                offset: parse_int(fields[1]).unwrap(),
                consonant: parse_int(fields[2]).unwrap(),
                cutoff: parse_int(fields[3]).unwrap(),
                preutterance: parse_int(fields[4]).unwrap(),
                overlap: parse_int(fields[5]).unwrap(),
            },
        )
    }
}

/// The ledger line of a record.
pub open spec fn format_line(e: OtoEntryView) -> Seq<u8> {
    e.file + seq![EQUALS] + (e.alias + seq![COMMA] + (format_int(e.offset) + seq![COMMA] + (format_int(
        e.consonant,
    ) + seq![COMMA] + (format_int(e.cutoff) + seq![COMMA] + (format_int(e.preutterance) + seq![COMMA]
        + format_int(e.overlap))))))
}

/// A line without the carriage return that may end it.
pub open spec fn strip_cr(line: Seq<u8>) -> Seq<u8> {
    if line.len() > 0 && line.last() == CARRIAGE_RETURN {
        line.drop_last()
    } else {
        line
    }
}

/// The lines of a ledger. A line ends at a line feed, and a carriage return
/// before that line feed is not part of it; what follows the last line feed
/// is a line if it is not empty.
pub open spec fn ledger_lines(content: Seq<u8>) -> Seq<Seq<u8>> {
    let pieces = split(content, NEWLINE);
    let terminated = pieces.len() - 1;
    Seq::new(
        if pieces.last().len() == 0 {
            terminated as nat
        } else {
            pieces.len()
        },
        |i: int|
            if i < terminated {
                strip_cr(pieces[i])
            } else {
                pieces[i]
            },
    )
}

/// Every line holds a record, and `entries` are those records in order.
pub open spec fn ledger_holds(lines: Seq<Seq<u8>>, entries: Seq<OtoEntry>) -> bool {
    &&& entries.len() == lines.len()
    &&& forall|i: int| 0 <= i < lines.len() ==> parse_line(#[trigger] lines[i]) == Ok::<OtoEntryView, ParseErrorKind>(entries[i]@)
}

/// Line `e.line` is the first that holds no record, and `e.kind` says why.
pub open spec fn ledger_fails(lines: Seq<Seq<u8>>, e: ParseError) -> bool {
    &&& e.line < lines.len()
    &&& parse_line(lines[e.line as int]) == Err::<OtoEntryView, ParseErrorKind>(e.kind)
    &&& forall|i: int| 0 <= i < e.line ==> parse_line(#[trigger] lines[i]) is Ok
}

/// Reads a timing field.
pub fn parse_i32(field: &[u8]) -> (r: Option<i32>)
    ensures
        r == parse_int(field@),
{
    let n = field.len();
    let mut start: usize = 0;
    let mut negative = false;
    if n > 0 && (field[0] == MINUS || field[0] == PLUS) {
        start = 1;
        negative = field[0] == MINUS;
    }
    let ghost ds = digits_of(field@);
    assert(ds =~= field@.skip(start as int));
    if start == n {
        return None;
    }
    let mut acc: i64 = 0;
    let mut overflow = false;
    let mut i: usize = start;
    while i < n
        invariant
            start <= i <= n,
            n == field@.len(),
            ds == field@.skip(start as int),
            ds == digits_of(field@),
            negative == (field@.len() > 0 && field@[0] == MINUS),
            forall|k: int| 0 <= k < i - start ==> is_digit(#[trigger] ds[k]),
            !overflow ==> acc == decimal(ds.take(i - start)) && 0 <= acc <= 2147483648,
            overflow ==> decimal(ds.take(i - start)) > 2147483648,
        decreases n - i,
    {
        let b = field[i];
        assert(ds[i - start] == b);
        if b < ZERO || b > ZERO + 9 {
            return None;
        }
        assert(ds.take(i + 1 - start).drop_last() =~= ds.take(i - start));
        assert(ds.take(i + 1 - start).last() == b);
        if !overflow {
            acc = acc * 10 + (b - ZERO) as i64;
            if acc > 2147483648 {
                overflow = true;
            }
        }
        i += 1;
    }
    assert(ds.take(n - start) =~= ds);
    if overflow {
        return None;
    }
    let value: i64 = if negative {
        -acc
    } else {
        acc
    };
    if value < -2147483648 || value > 2147483647 {
        return None;
    }
    Some(value as i32)
}

/// Appends the decimal digits of a number.
pub fn push_digits(out: &mut Vec<u8>, n: u32)
    ensures
        final(out)@ == old(out)@ + digits(n as nat),
    decreases n,
{
    if n >= 10 {
        push_digits(out, n / 10);
    }
    out.push(ZERO + (n % 10) as u8);
    assert(final(out)@ =~= old(out)@ + digits(n as nat));
}

/// Appends a number as a timing field.
pub fn push_i32(out: &mut Vec<u8>, i: i32)
    ensures
        final(out)@ == old(out)@ + format_int(i),
{
    if i < 0 {
        out.push(MINUS);
        push_digits(out, (-(i as i64)) as u32);
    } else {
        push_digits(out, i as u32);
    }
    assert(final(out)@ =~= old(out)@ + format_int(i));
}

/// Appends a copy of `bytes`.
pub fn push_bytes(out: &mut Vec<u8>, bytes: &[u8])
    ensures
        final(out)@ == old(out)@ + bytes@,
{
    let mut i: usize = 0;
    while i < bytes.len()
        invariant
            i <= bytes@.len(),
            out@ == old(out)@ + bytes@.take(i as int),
        decreases bytes@.len() - i,
    {
        out.push(bytes[i]);
        i += 1;
        assert(out@ =~= old(out)@ + bytes@.take(i as int));
    }
    assert(bytes@.take(i as int) =~= bytes@);
}

/// Reads one ledger line.
pub fn parse_entry(line: &[u8]) -> (r: Result<OtoEntry, ParseErrorKind>)
    ensures
        match r {
            Ok(entry) => parse_line(line@) == Ok::<OtoEntryView, ParseErrorKind>(entry@),
            Err(kind) => parse_line(line@) == Err::<OtoEntryView, ParseErrorKind>(kind),
        },
{
    let eq = find_from(line, 0, EQUALS);
    assert(line@.skip(0) =~= line@);
    if eq >= line.len() {
        return Err(ParseErrorKind::MissingSeparator);
    }
    let file = copy_range(line, 0, eq);
    let rest = copy_range(line, eq + 1, line.len());
    assert(rest@ =~= line@.skip(eq + 1));
    assert(file@ =~= line@.take(eq as int));
    let fields = split_bytes(rest.as_slice(), COMMA);
    assert(byte_views(fields@).len() == fields@.len());
    if fields.len() != 6 {
        return Err(ParseErrorKind::FieldCount);
    }
    assert(forall|i: int| 0 <= i < 6 ==> byte_views(fields@)[i] == fields@[i]@);
    let offset = parse_i32(fields[1].as_slice());
    let consonant = parse_i32(fields[2].as_slice());
    let cutoff = parse_i32(fields[3].as_slice());
    let preutterance = parse_i32(fields[4].as_slice());
    let overlap = parse_i32(fields[5].as_slice());
    match (offset, consonant, cutoff, preutterance, overlap) {
        (Some(offset), Some(consonant), Some(cutoff), Some(preutterance), Some(overlap)) => {
            let alias = copy_range(fields[0].as_slice(), 0, fields[0].len());
            assert(alias@ =~= fields@[0]@);
            Ok(OtoEntry { file, alias, offset, consonant, cutoff, preutterance, overlap })
        },
        _ => Err(ParseErrorKind::InvalidNumber),
    }
}

/// Writes one record as a ledger line, without a line end.
pub fn format_entry(entry: &OtoEntry) -> (line: Vec<u8>)
    ensures
        line@ == format_line(entry@),
{
    let mut line: Vec<u8> = Vec::new();
    push_bytes(&mut line, entry.file.as_slice());
    line.push(EQUALS);
    push_bytes(&mut line, entry.alias.as_slice());
    line.push(COMMA);
    push_i32(&mut line, entry.offset);
    line.push(COMMA);
    push_i32(&mut line, entry.consonant);
    line.push(COMMA);
    push_i32(&mut line, entry.cutoff);
    line.push(COMMA);
    push_i32(&mut line, entry.preutterance);
    line.push(COMMA);
    push_i32(&mut line, entry.overlap);
    assert(line@ =~= format_line(entry@));
    line
}

/// Reads a whole ledger: the records of all its lines, or the first line
/// that holds none.
pub fn parse_ledger(content: &[u8]) -> (r: Result<Vec<OtoEntry>, ParseError>)
    ensures
        match r {
            Ok(entries) => ledger_holds(ledger_lines(content@), entries@),
            Err(e) => ledger_fails(ledger_lines(content@), e),
        },
{
    let pieces = split_bytes(content, NEWLINE);
    proof {
        lemma_split_nonempty(content@, NEWLINE);
    }
    assert(byte_views(pieces@).len() == pieces@.len());
    let terminated = pieces.len() - 1;
    assert(byte_views(pieces@)[terminated as int] == pieces@[terminated as int]@);
    let n = if pieces[terminated].len() == 0 {
        terminated
    } else {
        pieces.len()
    };
    let ghost lines = ledger_lines(content@);
    let mut entries: Vec<OtoEntry> = Vec::new();
    let mut i: usize = 0;
    while i < n
        invariant
            i <= n <= pieces@.len(),
            n == lines.len(),
            lines == ledger_lines(content@),
            byte_views(pieces@) == split(content@, NEWLINE),
            terminated == pieces@.len() - 1,
            entries@.len() == i,
            forall|k: int| 0 <= k < i ==> parse_line(#[trigger] lines[k]) == Ok::<OtoEntryView, ParseErrorKind>(entries@[k]@),
        decreases n - i,
    {
        let piece = pieces[i].as_slice();
        assert(byte_views(pieces@)[i as int] == pieces@[i as int]@);
        let mut end = piece.len();
        if i < terminated && end > 0 && piece[end - 1] == CARRIAGE_RETURN {
            end -= 1;
        }
        let line = slice_subrange(piece, 0, end);
        assert(line@ =~= lines[i as int]);
        match parse_entry(line) {
            Ok(entry) => {
                entries.push(entry);
            },
            Err(kind) => {
                return Err(ParseError { line: i, kind });
            },
        }
        i += 1;
    }
    Ok(entries)
}

/// The timing table of one voicebank.
#[derive(Debug, Clone)]
pub struct Oto {
    pub path: String,
    pub contents: Vec<OtoEntry>,
}

/// Entry `i` is the first whose alias is exactly `key`.
pub open spec fn is_first_with_alias(entries: Seq<OtoEntry>, key: Seq<u8>, i: int) -> bool {
    &&& 0 <= i < entries.len()
    &&& entries[i].alias@ == key
    &&& forall|j: int| 0 <= j < i ==> (#[trigger] entries[j]).alias@ != key
}

impl Oto {
    /// An empty table for the ledger at `path`.
    pub fn new(path: String) -> (oto: Self)
        ensures
            oto.path == path,
            oto.contents@.len() == 0,
    {
        Oto { path, contents: Vec::new() }
    }

    /// Replaces the table by the records of a ledger. A ledger with a line
    /// that holds no record is refused as a whole, and the table stays as it
    /// was.
    pub fn load(&mut self, content: &[u8]) -> (r: Result<(), ParseError>)
        ensures
            final(self).path == old(self).path,
            match r {
                Ok(_) => ledger_holds(ledger_lines(content@), final(self).contents@),
                Err(e) => ledger_fails(ledger_lines(content@), e) && final(self).contents == old(
                    self,
                ).contents,
            },
    {
        match parse_ledger(content) {
            Ok(entries) => {
                self.contents = entries;
                Ok(())
            },
            Err(e) => Err(e),
        }
    }

    /// The first record whose alias is, byte for byte, `alias`.
    pub fn get_entry(&self, alias: &str) -> (r: Option<&OtoEntry>)
        ensures
            match r {
                Some(entry) => exists|i: int|
                    is_first_with_alias(self.contents@, alias.spec_bytes(), i) && *entry
                        == self.contents@[i],
                None => forall|i: int|
                    0 <= i < self.contents@.len() ==> (#[trigger] self.contents@[i]).alias@
                        != alias.spec_bytes(),
            },
    {
        let key = alias.as_bytes();
        let mut i: usize = 0;
        while i < self.contents.len()
            invariant
                i <= self.contents@.len(),
                key@ == alias.spec_bytes(),
                forall|j: int| 0 <= j < i ==> (#[trigger] self.contents@[j]).alias@ != key@,
            decreases self.contents@.len() - i,
        {
            if bytes_eq(self.contents[i].alias.as_slice(), key) {
                assert(is_first_with_alias(self.contents@, alias.spec_bytes(), i as int));
                return Some(&self.contents[i]);
            }
            i += 1;
        }
        None
    }
}

/// A ledger determines its records: reading it twice gives the same table.
pub proof fn lemma_ledger_determines_records(lines: Seq<Seq<u8>>, a: Seq<OtoEntry>, b: Seq<OtoEntry>)
    requires
        ledger_holds(lines, a),
        ledger_holds(lines, b),
    ensures
        a.len() == b.len(),
        forall|i: int| 0 <= i < a.len() ==> (#[trigger] a[i])@ == b[i]@,
{
    assert forall|i: int| 0 <= i < a.len() implies (#[trigger] a[i])@ == b[i]@ by {
        assert(parse_line(lines[i]) == Ok::<OtoEntryView, ParseErrorKind>(a[i]@));
        assert(parse_line(lines[i]) == Ok::<OtoEntryView, ParseErrorKind>(b[i]@));
    }
}

/// A ledger is either read or refused, never both.
pub proof fn lemma_ledger_holds_or_fails(lines: Seq<Seq<u8>>, entries: Seq<OtoEntry>, e: ParseError)
    requires
        ledger_holds(lines, entries),
    ensures
        !ledger_fails(lines, e),
{
    if ledger_fails(lines, e) {
        assert(parse_line(lines[e.line as int]) == Ok::<OtoEntryView, ParseErrorKind>(
            entries[e.line as int]@,
        ));
    }
}

/// The digits written for a number are digits, at least one, and denote it.
pub proof fn lemma_digits(n: nat)
    ensures
        digits(n).len() >= 1,
        all_digits(digits(n)),
        decimal(digits(n)) == n,
    decreases n,
{
    if n >= 10 {
        lemma_digits(n / 10);
        let d = digits(n / 10);
        assert(digits(n).drop_last() =~= d);
        assert forall|i: int| 0 <= i < digits(n).len() implies is_digit(#[trigger] digits(n)[i]) by {
            if i < d.len() {
                assert(digits(n)[i] == d[i]);
            }
        }
    } else {
        assert(digits(n).drop_last() =~= Seq::<u8>::empty());
        assert(decimal(digits(n).drop_last()) == 0);
    }
}

/// A written number reads back as itself, and holds no comma.
pub proof fn lemma_parse_format_int(i: i32)
    ensures
        parse_int(format_int(i)) == Some(i),
        !format_int(i).contains(COMMA),
{
    let s = format_int(i);
    if i < 0 {
        let n = (-i) as nat;
        lemma_digits(n);
        assert(s[0] == MINUS);
        assert(s.skip(1) =~= digits(n));
        assert forall|k: int| 0 <= k < s.len() implies s[k] != COMMA by {
            if k > 0 {
                assert(s[k] == digits(n)[k - 1]);
                assert(is_digit(digits(n)[k - 1]));
            }
        }
    } else {
        lemma_digits(i as nat);
        assert(is_digit(s[0]));
        assert forall|k: int| 0 <= k < s.len() implies s[k] != COMMA by {
            assert(is_digit(s[k]));
        }
    }
}

/// Reading the line written for a record gives the record back, provided
/// the file name holds no `=` and the alias no comma.
pub proof fn lemma_parse_format_line(e: OtoEntryView)
    requires
        !e.file.contains(EQUALS),
        !e.alias.contains(COMMA),
    ensures
        parse_line(format_line(e)) == Ok::<OtoEntryView, ParseErrorKind>(e),
{
    let f1 = format_int(e.offset);
    let f2 = format_int(e.consonant);
    let f3 = format_int(e.cutoff);
    let f4 = format_int(e.preutterance);
    let f5 = format_int(e.overlap);
    let t4 = f4 + seq![COMMA] + f5;
    let t3 = f3 + seq![COMMA] + t4;
    let t2 = f2 + seq![COMMA] + t3;
    let t1 = f1 + seq![COMMA] + t2;
    let rest = e.alias + seq![COMMA] + t1;
    let line = e.file + seq![EQUALS] + rest;
    assert(line == format_line(e));
    lemma_parse_format_int(e.offset);
    lemma_parse_format_int(e.consonant);
    lemma_parse_format_int(e.cutoff);
    lemma_parse_format_int(e.preutterance);
    lemma_parse_format_int(e.overlap);
    lemma_split_single(f5, COMMA);
    lemma_split_first(f4, f5, COMMA);
    lemma_split_first(f3, t4, COMMA);
    lemma_split_first(f2, t3, COMMA);
    lemma_split_first(f1, t2, COMMA);
    lemma_split_first(e.alias, t1, COMMA);
    let fields = split(rest, COMMA);
    assert(fields =~= seq![e.alias, f1, f2, f3, f4, f5]);
    let at = e.file.len() as int;
    assert forall|j: int| 0 <= j < at implies line[j] != EQUALS by {
        assert(e.file.contains(e.file[j]));
    }
    assert(line[at] == EQUALS);
    lemma_first_index_is_index_of(line, EQUALS, at);
    assert(line.skip(at + 1) =~= rest);
    assert(line.take(at) =~= e.file);
}

} // verus!
