//! The walk through the sections of a message.
//!
//! A message is section 0, section 1, then one or more grids, and the end
//! section. A grid is an optional section 2, a section 3 and one or more
//! products; a product is the sections 4, 5, 6 and 7 in this order. So which
//! sections may come next depends on the last one alone.

use crate::bytes::ByteReader;
use crate::invalid_data;
use crate::message::BitmapSectionHeader;
use crate::message::DataRepresentationSectionHeader;
use crate::message::DataSectionHeader;
use crate::message::GridDefinitionSectionHeader;
use crate::message::IdentificationSectionHeader;
use crate::message::IndicatorSectionHeader;
use crate::message::LocalUseSectionHeader;
use crate::message::ProductDefinitionSectionHeader;
use crate::message::edition_text;
use crate::message::section_number_text;
use crate::message::SectionHeader;
use crate::message::GRIB;
use crate::templates::value_at;
use crate::Error;
use crate::Failure;
use vstd::prelude::*;

verus! {

broadcast use crate::bytes::lemma_offset_natural;

/// Whether section `next` may stand behind section `prev`.
pub open spec fn may_follow(prev: u8, next: u8) -> bool {
    match prev {
        0 => next == 1,
        1 => next == 2 || next == 3,
        2 => next == 3,
        3 => next == 4,
        4 => next == 5,
        5 => next == 6,
        6 => next == 7,
        7 => next == 2 || next == 3 || next == 4 || next == 8,
        _ => false,
    }
}

/// The number of octets of the header of section `number` behind the length
/// and the number.
pub open spec fn header_octets(number: u8, section_length: u32) -> int {
    match number {
        1 => IdentificationSectionHeader::octets(section_length),
        3 => 9,
        4 => 4,
        5 => 6,
        6 => 1,
        _ => 0,
    }
}

/// What the error for a section that may not stand behind section `prev`
/// says: behind the sections 0 to 6 it names the section that is due, which
/// behind section 1 is section 3.
pub open spec fn order_text(prev: u8, number: u8) -> Seq<char> {
    if prev == 0 {
        section_number_text(1, number)
    } else if prev == 1 || prev == 2 {
        section_number_text(3, number)
    } else if 3 <= prev <= 6 {
        section_number_text((prev + 1) as u8, number)
    } else {
        "invalid section number"@
    }
}

/// A section as it lies in the bytes: its number and how many octets it
/// takes, header and body together.
pub struct SectionSpan {
    pub number: u8,
    pub length: int,
}

/// The section that starts at `at` behind section `prev`, or why it cannot
/// be read.
///
/// The header comes first: the end marker where `prev` is 7 and it stands
/// there, else the length and the number. A number that may not follow
/// `prev` is invalid data. Then the rest of the header has to be there, the
/// length has to leave room for the header, and the body has to be there: a
/// length too short is invalid data, bytes that end too early an I/O error.
pub open spec fn section_at(bytes: Seq<u8>, at: int, prev: u8) -> Result<SectionSpan, Failure> {
    let left = bytes.len() - at;
    let allow_end = prev == 7;
    let header = SectionHeader::parsed(bytes, at, allow_end);
    let fixed = 5 + header_octets(header.number_of_section, header.section_length);
    if left < 4 || left < SectionHeader::octets(bytes, at, allow_end) {
        Err(Failure::Io)
    } else if !may_follow(prev, header.number_of_section) {
        Err(Failure::InvalidData(order_text(prev, header.number_of_section)))
    } else if header.number_of_section == 8 {
        Ok(SectionSpan { number: 8, length: SectionHeader::octets(bytes, at, allow_end) })
    } else if left < fixed {
        Err(Failure::Io)
    } else if header.section_length < fixed {
        Err(Failure::InvalidData("section length is shorter than the section's header"@))
    } else if left < header.section_length {
        Err(Failure::Io)
    } else {
        Ok(
            SectionSpan {
                number: header.number_of_section,
                length: header.section_length as int,
            },
        )
    }
}

/// How the walk through a message ends.
pub enum Walk {
    /// No byte is left.
    NoMoreMessages,
    /// The message is complete and ends at `end`.
    MessageRead { end: int },
    /// The bytes are no message.
    Failed(Failure),
}

/// How the walk through the sections from `at` on ends, behind section
/// `prev`.
pub open spec fn sections_walk(bytes: Seq<u8>, at: int, prev: u8) -> Walk
    decreases bytes.len() - at,
{
    match section_at(bytes, at, prev) {
        Err(f) => Walk::Failed(f),
        Ok(span) => if span.number == 8 {
            Walk::MessageRead { end: at + span.length }
        } else {
            sections_walk(bytes, at + span.length, span.number)
        },
    }
}

/// What is wrong with the sixteen octets of section 0 at `at`, if anything
/// is: the letters `GRIB` come first and are checked as soon as they are
/// read, then the edition, which must be 2. Octets that are not there are
/// an I/O error.
pub open spec fn indicator_failure(bytes: Seq<u8>, at: int) -> Option<Failure> {
    let left = bytes.len() - at;
    if left < 4 {
        Some(Failure::Io)
    } else if value_at::<u32>(bytes, at) != GRIB {
        Some(Failure::InvalidData("message identifier must be 'GRIB'"@))
    } else if left < 8 {
        Some(Failure::Io)
    } else if IndicatorSectionHeader::edition_at(bytes, at + 4) != 2 {
        Some(Failure::InvalidData(edition_text(IndicatorSectionHeader::edition_at(bytes, at + 4))))
    } else if left < 16 {
        Some(Failure::Io)
    } else {
        None
    }
}

/// How the walk through the message that starts at `at` ends, where no
/// handler refuses a section.
///
/// With no byte left there is no message. Else section 0 comes first, and
/// the sections follow.
pub open spec fn message_walk(bytes: Seq<u8>, at: int) -> Walk {
    if bytes.len() - at <= 0 {
        Walk::NoMoreMessages
    } else {
        match indicator_failure(bytes, at) {
            Some(f) => Walk::Failed(f),
            None => sections_walk(bytes, at + 16, 0),
        }
    }
}

/// The walk through the sections of a message ends with the message read
/// or with a failure.
pub proof fn lemma_sections_walk_ends(bytes: Seq<u8>, at: int, prev: u8)
    ensures
        !(sections_walk(bytes, at, prev) is NoMoreMessages),
    decreases bytes.len() - at,
{
    if let Ok(span) = section_at(bytes, at, prev) {
        if span.number != 8 {
            lemma_sections_walk_ends(bytes, at + span.length, span.number);
        }
    }
}

/// A section other than the end section takes as many octets as the length
/// in its header says, and has the number that stands there.
pub proof fn lemma_section_takes_its_length(bytes: Seq<u8>, at: int, prev: u8)
    ensures
        section_at(bytes, at, prev) matches Ok(span) ==> span.number == 8 || (span.length
            == value_at::<u32>(bytes, at) && span.number == value_at::<u8>(bytes, at + 4)),
{
}

/// Where the walk stands after `n` messages from `at` on, one behind the
/// other, where the bytes hold as many.
pub open spec fn messages_end(bytes: Seq<u8>, at: int, n: nat) -> Option<int>
    decreases n,
{
    if n == 0 {
        Some(at)
    } else {
        match messages_end(bytes, at, (n - 1) as nat) {
            Some(start) => match message_walk(bytes, start) {
                Walk::MessageRead { end } => Some(end),
                _ => None,
            },
            None => None,
        }
    }
}

/// Whether the bytes from `at` on are `n` messages, one behind the other,
/// and nothing else.
pub open spec fn holds_messages(bytes: Seq<u8>, at: int, n: nat) -> bool {
    messages_end(bytes, at, n) == Some(bytes.len() as int)
}

/// In bytes that are `n` messages the walk reads a message at each of the
/// first `n` stops and finds no more messages at the stop behind them.
pub proof fn lemma_messages_then_no_more(bytes: Seq<u8>, at: int, n: nat, k: nat)
    requires
        holds_messages(bytes, at, n),
        k <= n,
    ensures
        messages_end(bytes, at, k) matches Some(stop) && (if k < n {
            message_walk(bytes, stop) is MessageRead
        } else {
            message_walk(bytes, stop) is NoMoreMessages
        }),
    decreases n - k,
{
    if k < n {
        lemma_messages_then_no_more(bytes, at, n, k + 1);
    }
}

/// A section that was read: its header, and a reader over its body alone.
#[derive(Debug)]
pub enum Section<'a> {
    Identification(IdentificationSectionHeader, ByteReader<'a>),
    LocalUse(LocalUseSectionHeader, ByteReader<'a>),
    GridDefinition(GridDefinitionSectionHeader, ByteReader<'a>),
    ProductDefinition(ProductDefinitionSectionHeader, ByteReader<'a>),
    DataRepresentation(DataRepresentationSectionHeader, ByteReader<'a>),
    Bitmap(BitmapSectionHeader, ByteReader<'a>),
    Data(DataSectionHeader, ByteReader<'a>),
    End(SectionHeader),
}

impl<'a> Section<'a> {
    /// The number of the section.
    pub open spec fn number(self) -> u8 {
        match self {
            Section::Identification(_, _) => 1,
            Section::LocalUse(_, _) => 2,
            Section::GridDefinition(_, _) => 3,
            Section::ProductDefinition(_, _) => 4,
            Section::DataRepresentation(_, _) => 5,
            Section::Bitmap(_, _) => 6,
            Section::Data(_, _) => 7,
            Section::End(_) => 8,
        }
    }

    /// Whether `body` stands at the start of exactly the octets of `bytes`
    /// from `from` up to `to`.
    pub open spec fn body_is(body: ByteReader<'a>, bytes: Seq<u8>, from: int, to: int) -> bool {
        body.offset() == 0 && body.bytes() == bytes.subrange(from, to)
    }

    /// Whether this is the section of `length` octets that starts at `at` in
    /// `bytes`, read behind section `prev`: the header as it is written
    /// there, and the body from behind the header to the end of the section.
    pub open spec fn lies_at(self, bytes: Seq<u8>, at: int, length: int, prev: u8) -> bool {
        let len = value_at::<u32>(bytes, at);
        match self {
            Section::Identification(h, body) => h == IdentificationSectionHeader::parsed(
                len,
                bytes,
                at + 5,
            ) && Self::body_is(
                body,
                bytes,
                at + 5 + IdentificationSectionHeader::octets(len),
                at + length,
            ),
            Section::LocalUse(h, body) => h.section_length == len && Self::body_is(
                body,
                bytes,
                at + 5,
                at + length,
            ),
            Section::GridDefinition(h, body) => h == GridDefinitionSectionHeader::parsed(
                len,
                bytes,
                at + 5,
            ) && Self::body_is(body, bytes, at + 14, at + length),
            Section::ProductDefinition(h, body) => h == ProductDefinitionSectionHeader::parsed(
                len,
                bytes,
                at + 5,
            ) && Self::body_is(body, bytes, at + 9, at + length),
            Section::DataRepresentation(h, body) => h == DataRepresentationSectionHeader::parsed(
                len,
                bytes,
                at + 5,
            ) && Self::body_is(body, bytes, at + 11, at + length),
            Section::Bitmap(h, body) => h == BitmapSectionHeader::parsed(len, bytes, at + 5)
                && Self::body_is(body, bytes, at + 6, at + length),
            Section::Data(h, body) => h.section_length == len && Self::body_is(
                body,
                bytes,
                at + 5,
                at + length,
            ),
            Section::End(h) => h == SectionHeader::parsed(bytes, at, prev == 7),
        }
    }
}

/// Splits the body off a section whose header has been read.
fn body_of<'a>(reader: &mut ByteReader<'a>, has_body: bool, header: u32, section_length: u32) -> (r:
    Result<ByteReader<'a>, Error>)
    requires
        5 <= header <= 23,
        has_body <==> section_length >= header,
    ensures
        final(reader).bytes() == old(reader).bytes(),
        !has_body ==> (r matches Err(e) && e.failure() == Failure::InvalidData(
            "section length is shorter than the section's header"@,
        )),
        has_body && old(reader).unread() < section_length - header ==> r matches Err(Error::IO(_)),
        has_body && old(reader).unread() >= section_length - header ==> (r matches Ok(body)
            && Section::body_is(
            body,
            old(reader).bytes(),
            old(reader).offset(),
            old(reader).offset() + section_length - header,
        )) && final(reader).advanced(*old(reader), section_length - header),
{
    if !has_body {
        return Err(invalid_data("section length is shorter than the section's header"));
    }
    reader.take((section_length - header) as usize)
}

/// Reads the section at the reader's position, which stands behind section
/// `prev` (0 for the indicator section), and moves the reader behind it.
///
/// It succeeds exactly where [`section_at`] finds a section, and fails with
/// the kind of error that it gives. The reader ends up `length` octets on,
/// whatever is done with the body that is handed out.
pub fn next_section<'a>(reader: &mut ByteReader<'a>, prev: u8) -> (r: Result<Section<'a>, Error>)
    ensures
        final(reader).bytes() == old(reader).bytes(),
        match section_at(old(reader).bytes(), old(reader).offset(), prev) {
            Ok(span) => (r matches Ok(section) && section.number() == span.number
                && section.lies_at(old(reader).bytes(), old(reader).offset(), span.length, prev))
                && final(reader).advanced(*old(reader), span.length),
            Err(f) => r matches Err(e) && e.failure() == f,
        },
{
    proof {
        use_type_invariant(&*reader);
    }
    let header = SectionHeader::read(reader, prev == 7)?;
    let number = header.number_of_section;
    let length = header.section_length;
    if prev == 0 {
        let ids = IdentificationSectionHeader::read(header, reader)?;
        let body = body_of(reader, length == 21 || length >= 23, if length == 21 {
            21
        } else {
            23
        }, length)?;
        Ok(Section::Identification(ids, body))
    } else if (prev == 1 || prev == 7) && number == 2 {
        let loc = LocalUseSectionHeader::read(header, reader)?;
        let body = body_of(reader, length >= 5, 5, length)?;
        Ok(Section::LocalUse(loc, body))
    } else if prev == 1 || prev == 2 || (prev == 7 && number == 3) {
        let gds = GridDefinitionSectionHeader::read(&header, reader)?;
        let body = body_of(reader, length >= 14, 14, length)?;
        Ok(Section::GridDefinition(gds, body))
    } else if prev == 3 || (prev == 7 && number == 4) {
        let pds = ProductDefinitionSectionHeader::read(&header, reader)?;
        let body = body_of(reader, length >= 9, 9, length)?;
        Ok(Section::ProductDefinition(pds, body))
    } else if prev == 4 {
        let drs = DataRepresentationSectionHeader::read(&header, reader)?;
        let body = body_of(reader, length >= 11, 11, length)?;
        Ok(Section::DataRepresentation(drs, body))
    } else if prev == 5 {
        let bitmap = BitmapSectionHeader::read(&header, reader)?;
        let body = body_of(reader, length >= 6, 6, length)?;
        Ok(Section::Bitmap(bitmap, body))
    } else if prev == 6 {
        let data = DataSectionHeader::read(&header)?;
        let body = body_of(reader, length >= 5, 5, length)?;
        Ok(Section::Data(data, body))
    } else if prev == 7 && number == 8 {
        Ok(Section::End(header))
    } else {
        Err(invalid_data("invalid section number"))
    }
}

/// The handlers of the sections of a message, and the walk that calls them.
///
/// Each handler gets the header of its section and a reader over the body of
/// that section and nothing else. What a handler reads of the body, or leaves
/// unread, does not move the walk. A handler that is not written skips its
/// section.
pub trait MessageReader {
    /// Whether no handler of this set ever refuses a section. A set that
    /// says so has to keep the promise: each of its handlers then returns
    /// `Ok`. A set that says nothing promises nothing.
    open spec fn never_refuses(&self) -> bool {
        false
    }

    /// The error with which a handler of this set last refused a section,
    /// where one did. Every handler that returns an error leaves it here, so
    /// that the walk can say whose error it hands on.
    open spec fn refusal(&self) -> Option<Error> {
        None
    }

    /// Takes the indicator section, which has no body.
    fn handle_indicator(&mut self, is: IndicatorSectionHeader) -> (r: Result<(), Error>)
        ensures
            old(self).never_refuses() ==> r is Ok && final(self).never_refuses(),
            r matches Err(e) ==> final(self).refusal() == Some(e),
        default_ensures
            r is Ok,
    {
        Ok(())
    }

    /// Takes the identification section and what lies behind its header.
    fn handle_identification(
        &mut self,
        ids: IdentificationSectionHeader,
        reader: &mut ByteReader,
    ) -> (r: Result<(), Error>)
        requires
            ids.has_body(),
            old(reader).offset() == 0,
            old(reader).bytes().len() == ids.body_octets(),
        ensures
            old(self).never_refuses() ==> r is Ok && final(self).never_refuses(),
            r matches Err(e) ==> final(self).refusal() == Some(e),
        default_ensures
            r is Ok,
    {
        Ok(())
    }

    /// Takes a local use section and its body.
    fn handle_local_use(&mut self, loc: LocalUseSectionHeader, reader: &mut ByteReader) -> (r:
        Result<(), Error>)
        requires
            loc.has_body(),
            old(reader).offset() == 0,
            old(reader).bytes().len() == loc.body_octets(),
        ensures
            old(self).never_refuses() ==> r is Ok && final(self).never_refuses(),
            r matches Err(e) ==> final(self).refusal() == Some(e),
        default_ensures
            r is Ok,
    {
        Ok(())
    }

    /// Takes a grid definition section and its body, the template of the
    /// grid.
    fn handle_grid_definition(
        &mut self,
        gds: GridDefinitionSectionHeader,
        reader: &mut ByteReader,
    ) -> (r: Result<(), Error>)
        requires
            gds.has_body(),
            old(reader).offset() == 0,
            old(reader).bytes().len() == gds.body_octets(),
        ensures
            old(self).never_refuses() ==> r is Ok && final(self).never_refuses(),
            r matches Err(e) ==> final(self).refusal() == Some(e),
        default_ensures
            r is Ok,
    {
        Ok(())
    }

    /// Takes a product definition section and its body, the template of the
    /// product.
    fn handle_product_definition(
        &mut self,
        pds: ProductDefinitionSectionHeader,
        reader: &mut ByteReader,
    ) -> (r: Result<(), Error>)
        requires
            pds.has_body(),
            old(reader).offset() == 0,
            old(reader).bytes().len() == pds.body_octets(),
        ensures
            old(self).never_refuses() ==> r is Ok && final(self).never_refuses(),
            r matches Err(e) ==> final(self).refusal() == Some(e),
        default_ensures
            r is Ok,
    {
        Ok(())
    }

    /// Takes a data representation section and its body, the template of the
    /// packing.
    fn handle_data_representation(
        &mut self,
        drs: DataRepresentationSectionHeader,
        reader: &mut ByteReader,
    ) -> (r: Result<(), Error>)
        requires
            drs.has_body(),
            old(reader).offset() == 0,
            old(reader).bytes().len() == drs.body_octets(),
        ensures
            old(self).never_refuses() ==> r is Ok && final(self).never_refuses(),
            r matches Err(e) ==> final(self).refusal() == Some(e),
        default_ensures
            r is Ok,
    {
        Ok(())
    }

    /// Takes a bit-map section and its body, the bit map where there is one.
    fn handle_bitmap(&mut self, bitmap: BitmapSectionHeader, reader: &mut ByteReader) -> (r: Result<
        (),
        Error,
    >)
        requires
            bitmap.has_body(),
            old(reader).offset() == 0,
            old(reader).bytes().len() == bitmap.body_octets(),
        ensures
            old(self).never_refuses() ==> r is Ok && final(self).never_refuses(),
            r matches Err(e) ==> final(self).refusal() == Some(e),
        default_ensures
            r is Ok,
    {
        Ok(())
    }

    /// Takes a data section and its body, the packed samples.
    fn handle_data(&mut self, data: DataSectionHeader, reader: &mut ByteReader) -> (r: Result<
        (),
        Error,
    >)
        requires
            data.has_body(),
            old(reader).offset() == 0,
            old(reader).bytes().len() == data.body_octets(),
        ensures
            old(self).never_refuses() ==> r is Ok && final(self).never_refuses(),
            r matches Err(e) ==> final(self).refusal() == Some(e),
        default_ensures
            r is Ok,
    {
        Ok(())
    }

    /// Reads one message from the reader's position on and hands each of its
    /// sections to its handler, in the order of the bytes.
    ///
    /// With no byte left it returns `Ok(None)` and reads nothing. It returns
    /// `Ok(Some(()))` only for bytes that [`message_walk`] reads as a
    /// message, with the reader at the end of that message. An error is
    /// either the one that [`message_walk`] finds in the bytes or the one
    /// with which a handler refused a section: the walk stops at the first
    /// of the two and hands it on. What is wrong with section 0 is found
    /// before any handler is called. With handlers that never refuse, the
    /// outcome is that of [`message_walk`].
    fn read_next_message(&mut self, reader: &mut ByteReader) -> (r: Result<Option<()>, Error>)
        ensures
            final(reader).bytes() == old(reader).bytes(),
            r == Ok::<Option<()>, Error>(None) <==> old(reader).unread() == 0,
            match message_walk(old(reader).bytes(), old(reader).offset()) {
                Walk::NoMoreMessages => r == Ok::<Option<()>, Error>(None) && *final(reader)
                    == *old(reader),
                Walk::MessageRead { end } => (r matches Err(e) && !old(self).never_refuses()
                    && final(self).refusal() == Some(e)) || (r == Ok::<Option<()>, Error>(
                    Some(()),
                ) && final(reader).offset() == end),
                Walk::Failed(f) => r matches Err(e) && (e.failure() == f || (
                !old(self).never_refuses() && final(self).refusal() == Some(e))),
            },
            old(reader).unread() > 0 && indicator_failure(
                old(reader).bytes(),
                old(reader).offset(),
            ) is Some ==> (r matches Err(e) && Some(e.failure()) == indicator_failure(
                old(reader).bytes(),
                old(reader).offset(),
            )),
            old(self).never_refuses() ==> final(self).never_refuses(),
    {
        proof {
            use_type_invariant(&*reader);
        }
        if reader.remaining() == 0 {
            return Ok(None);
        }
        proof {
            lemma_sections_walk_ends(reader.bytes(), reader.offset() + 16, 0);
        }
        let identifier = reader.read_u32()?;
        if identifier != GRIB {
            return Err(invalid_data("message identifier must be 'GRIB'"));
        }
        // Indicator Section (0)
        let is = IndicatorSectionHeader::read(reader)?;
        self.handle_indicator(is)?;
        let mut prev: u8 = 0;
        loop
            invariant
                reader.bytes() == old(reader).bytes(),
                old(self).never_refuses() ==> self.never_refuses(),
                indicator_failure(old(reader).bytes(), old(reader).offset()) is None,
                !(message_walk(old(reader).bytes(), old(reader).offset()) is NoMoreMessages),
                sections_walk(reader.bytes(), reader.offset(), prev) == message_walk(
                    old(reader).bytes(),
                    old(reader).offset(),
                ),
            decreases reader.unread(),
        {
            proof {
                use_type_invariant(&*reader);
            }
            match next_section(reader, prev)? {
                Section::Identification(ids, mut body) => {
                    self.handle_identification(ids, &mut body)?;
                    prev = 1;
                },
                Section::LocalUse(loc, mut body) => {
                    self.handle_local_use(loc, &mut body)?;
                    prev = 2;
                },
                Section::GridDefinition(gds, mut body) => {
                    self.handle_grid_definition(gds, &mut body)?;
                    prev = 3;
                },
                Section::ProductDefinition(pds, mut body) => {
                    self.handle_product_definition(pds, &mut body)?;
                    prev = 4;
                },
                Section::DataRepresentation(drs, mut body) => {
                    self.handle_data_representation(drs, &mut body)?;
                    prev = 5;
                },
                Section::Bitmap(bitmap, mut body) => {
                    self.handle_bitmap(bitmap, &mut body)?;
                    prev = 6;
                },
                Section::Data(data, mut body) => {
                    self.handle_data(data, &mut body)?;
                    prev = 7;
                },
                Section::End(_) => {
                    return Ok(Some(()));
                },
            }
        }
    }
}

/// The handlers that skip every section: with them the walk looks at the
/// headers alone.
#[derive(Debug)]
pub struct SkipAll;

impl MessageReader for SkipAll {
    open spec fn never_refuses(&self) -> bool {
        true
    }
}

} // verus!
